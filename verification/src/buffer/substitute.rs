//! Escape sequence interpreter for replacement texts.
use vstd::prelude::*;
use crate::text::{chars_of, string_from_chars};

verus! {

/// What an escaped character stands for: `\\`, `\n`, `\r` and `\t` are
/// interpreted, any other escaped character is kept together with its
/// backslash.
pub open spec fn escaped_char(c: char) -> Seq<char> {
    if c == '\\' {
        seq!['\\']
    } else if c == 'n' {
        seq!['\n']
    } else if c == 'r' {
        seq!['\r']
    } else if c == 't' {
        seq!['\t']
    } else {
        seq!['\\', c]
    }
}

/// The interpretation of `s` when the character before it was an unescaped
/// backslash (`escaped`) or not. A lone backslash at the very end is dropped.
pub open spec fn unescaped(s: Seq<char>, escaped: bool) -> Seq<char>
    decreases s.len(),
{
    if s.len() == 0 {
        Seq::empty()
    } else if escaped {
        escaped_char(s[0]) + unescaped(s.drop_first(), false)
    } else if s[0] == '\\' {
        unescaped(s.drop_first(), true)
    } else {
        seq![s[0]] + unescaped(s.drop_first(), false)
    }
}

/// Takes input str, returns string with escapes interpreted.
pub fn substitute(input: &str) -> (out: String)
    ensures
        out@ == unescaped(input@, false),
{
    let chars = chars_of(input);
    let mut out: Vec<char> = Vec::new();
    let mut escaped = false;
    let mut i: usize = 0;
    assert(chars@.subrange(0, chars@.len() as int) =~= input@);
    assert(out@ + unescaped(input@, false) =~= unescaped(input@, false));
    while i < chars.len()
        invariant
            i <= chars@.len(),
            chars@ == input@,
            out@ + unescaped(chars@.subrange(i as int, chars@.len() as int), escaped)
                == unescaped(input@, false),
        decreases chars@.len() - i,
    {
        let ghost rest = chars@.subrange(i as int, chars@.len() as int);
        let ghost old_out = out@;
        assert(rest.drop_first() =~= chars@.subrange(i + 1, chars@.len() as int));
        let ch = chars[i];
        if escaped {
            if ch == '\\' {
                out.push('\\');
            } else if ch == 'n' {
                out.push('\n');
            } else if ch == 'r' {
                out.push('\r');
            } else if ch == 't' {
                out.push('\t');
            } else {
                out.push('\\');
                out.push(ch);
            }
            assert(out@ =~= old_out + escaped_char(ch));
            escaped = false;
        } else {
            if ch == '\\' {
                escaped = true;
            } else {
                out.push(ch);
                assert(out@ =~= old_out + seq![ch]);
            }
        }
        i = i + 1;
    }
    assert(chars@.subrange(i as int, chars@.len() as int) =~= Seq::<char>::empty());
    assert(out@ + Seq::<char>::empty() =~= out@);
    string_from_chars(out.as_slice())
}

} // verus!
