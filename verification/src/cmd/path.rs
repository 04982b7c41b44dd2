//! File paths and shell commands given to file commands.
use vstd::prelude::*;
use crate::cmd::selection::char_at;
use crate::error::{EdError, EdResult};
use crate::text::{chars_of, push_str, string_from_chars};

verus! {

/// A path argument: a file, or a shell command (written after `!`).
#[derive(PartialEq, Debug)]
pub enum Path<'a> {
    File(&'a str),
    Command(&'a str),
}

/// Whether `c` has the Unicode `White_Space` property, as
/// `char::is_whitespace` tests.
pub open spec fn is_whitespace(c: char) -> bool {
    ('\u{9}' <= c && c <= '\u{d}') || c == ' ' || c == '\u{85}' || c == '\u{a0}' || c == '\u{1680}'
        || ('\u{2000}' <= c && c <= '\u{200a}') || c == '\u{2028}' || c == '\u{2029}' || c == '\u{202f}'
        || c == '\u{205f}' || c == '\u{3000}'
}

/// Whether `c` is whitespace.
pub fn char_is_whitespace(c: char) -> (b: bool)
    ensures
        b == is_whitespace(c),
{
    ('\u{9}' <= c && c <= '\u{d}') || c == ' ' || c == '\u{85}' || c == '\u{a0}' || c == '\u{1680}'
        || ('\u{2000}' <= c && c <= '\u{200a}') || c == '\u{2028}' || c == '\u{2029}' || c == '\u{202f}'
        || c == '\u{205f}' || c == '\u{3000}'
}

/// The number of whitespace characters `s` starts with.
pub open spec fn leading_whitespace(s: Seq<char>) -> nat
    decreases s.len(),
{
    if s.len() > 0 && is_whitespace(s[0]) {
        1 + leading_whitespace(s.drop_first())
    } else {
        0
    }
}

/// The mathematical value of a [`Path`].
pub enum PathV {
    File(Seq<char>),
    Command(Seq<char>),
}

pub open spec fn path_view<'a>(p: Option<Path<'a>>) -> Option<PathV> {
    match p {
        Some(Path::File(f)) => Some(PathV::File(f@)),
        Some(Path::Command(c)) => Some(PathV::Command(c@)),
        None => None,
    }
}

/// What [`parse_path`] gives for `input`: nothing when it is blank, else,
/// without its leading whitespace, a command if it starts with `!` (the
/// `!` dropped) and a file otherwise.
pub open spec fn parse_path_spec(input: Seq<char>) -> Option<PathV> {
    let t = input.skip(leading_whitespace(input) as int);
    if t.len() == 0 {
        None
    } else if t[0] == '!' {
        Some(PathV::Command(t.drop_first()))
    } else {
        Some(PathV::File(t))
    }
}

pub proof fn lemma_leading_whitespace_is(s: Seq<char>, i: int)
    requires
        0 <= i <= s.len(),
        forall|j: int| 0 <= j < i ==> is_whitespace(#[trigger] s[j]),
        i == s.len() || !is_whitespace(s[i]),
    ensures
        leading_whitespace(s) == i,
    decreases i,
{
    if i > 0 {
        lemma_leading_whitespace_is(s.drop_first(), i - 1);
    }
}

/// The file path or shell command given, if any.
pub fn parse_path<'a>(input: &'a str) -> (r: Option<Path<'a>>)
    ensures
        path_view(r) == parse_path_spec(input@),
{
    let chars = chars_of(input);
    let len = chars.len();
    let mut i: usize = 0;
    while i < len && char_is_whitespace(char_at(&chars, i))
        invariant
            i <= len,
            len == chars@.len(),
            chars@ == input@,
            forall|j: int| 0 <= j < i ==> is_whitespace(#[trigger] chars@[j]),
        decreases len - i,
    {
        i = i + 1;
    }
    proof {
        lemma_leading_whitespace_is(input@, i as int);
        if i < len {
            assert(input@.skip(i as int).drop_first() =~= input@.subrange(i + 1, len as int));
        }
    }
    if i == len {
        None
    } else if char_at(&chars, i) == '!' {
        Some(Path::Command(input.substring_char(i + 1, len)))
    } else {
        Some(Path::File(input.substring_char(i, len)))
    }
}

/// Why command substitution failed.
pub enum SubstitutionFault {
    /// `%` was used but no file is set.
    FileUnset,
    /// `!` was used but no command was run before.
    CommandUnset,
}

/// `p` prepended to a successful result.
pub open spec fn prefixed(p: Seq<char>, r: Result<Seq<char>, SubstitutionFault>) -> Result<Seq<char>, SubstitutionFault> {
    match r {
        Ok(x) => Ok(p + x),
        Err(f) => Err(f),
    }
}

/// Substitution in `c` from position `i` on, after a backslash when
/// `escaped`: unescaped `%` becomes `file` and `!` becomes `prev`; `\%`
/// and `\!` become `%` and `!`; other escapes are kept (`\\` as `\\`); a
/// final lone backslash is dropped.
pub open spec fn substituted_from(c: Seq<char>, i: int, escaped: bool, file: Seq<char>, prev: Seq<char>) -> Result<Seq<char>, SubstitutionFault>
    decreases c.len() - i,
{
    if i < 0 || i >= c.len() {
        Ok(Seq::empty())
    } else {
        let ch = c[i];
        if ch == '\\' {
            if escaped {
                prefixed(seq!['\\', '\\'], substituted_from(c, i + 1, false, file, prev))
            } else {
                substituted_from(c, i + 1, true, file, prev)
            }
        } else if ch == '%' {
            if escaped {
                prefixed(seq!['%'], substituted_from(c, i + 1, false, file, prev))
            } else if file.len() == 0 {
                Err(SubstitutionFault::FileUnset)
            } else {
                prefixed(file, substituted_from(c, i + 1, false, file, prev))
            }
        } else if ch == '!' {
            if escaped {
                prefixed(seq!['!'], substituted_from(c, i + 1, false, file, prev))
            } else if prev.len() == 0 {
                Err(SubstitutionFault::CommandUnset)
            } else {
                prefixed(prev, substituted_from(c, i + 1, false, file, prev))
            }
        } else if escaped {
            prefixed(seq!['\\', ch], substituted_from(c, i + 1, false, file, prev))
        } else {
            prefixed(seq![ch], substituted_from(c, i + 1, false, file, prev))
        }
    }
}

proof fn lemma_prefixed_twice(a: Seq<char>, b: Seq<char>, r: Result<Seq<char>, SubstitutionFault>)
    ensures
        prefixed(a, prefixed(b, r)) == prefixed(a + b, r),
{
    if let Ok(x) = r {
        assert(a + (b + x) =~= (a + b) + x);
    }
}

/// Replaces `%` in a shell command with the default file and `!` with the
/// previous command, honouring `\%` and `\!` as escapes.
pub fn command_substitutions(command: &str, state_file: &str, prev_command: &str) -> (r: EdResult<String>)
    ensures
        match substituted_from(command@, 0, false, state_file@, prev_command@) {
            Ok(t) => r matches Ok(s) && s@ == t,
            Err(SubstitutionFault::FileUnset) => r == Err::<String, EdError>(EdError::DefaultFileUnset),
            Err(SubstitutionFault::CommandUnset) => r == Err::<String, EdError>(EdError::DefaultShellCommandUnset),
        },
{
    let chars = chars_of(command);
    let ghost goal = substituted_from(command@, 0, false, state_file@, prev_command@);
    let mut escaped = false;
    let mut out: Vec<char> = Vec::new();
    let mut i: usize = 0;
    while i < chars.len()
        invariant
            i <= chars@.len(),
            chars@ == command@,
            goal == substituted_from(command@, 0, false, state_file@, prev_command@),
            prefixed(out@, substituted_from(command@, i as int, escaped, state_file@, prev_command@)) == goal,
        decreases chars@.len() - i,
    {
        let ch = char_at(&chars, i);
        let ghost before = out@;
        let ghost rest = substituted_from(command@, i + 1, false, state_file@, prev_command@);
        if ch == '\\' {
            if escaped {
                out.push('\\');
                out.push('\\');
                escaped = false;
                proof {
                    lemma_prefixed_twice(before, seq!['\\', '\\'], rest);
                    assert(before + seq!['\\', '\\'] =~= out@);
                }
            } else {
                escaped = true;
            }
        } else if ch == '%' {
            if escaped {
                out.push('%');
                escaped = false;
                proof {
                    lemma_prefixed_twice(before, seq!['%'], rest);
                    assert(before + seq!['%'] =~= out@);
                }
            } else {
                if state_file.is_empty() {
                    return Err(EdError::DefaultFileUnset);
                }
                push_str(&mut out, state_file);
                proof {
                    lemma_prefixed_twice(before, state_file@, rest);
                }
            }
        } else if ch == '!' {
            if escaped {
                out.push('!');
                escaped = false;
                proof {
                    lemma_prefixed_twice(before, seq!['!'], rest);
                    assert(before + seq!['!'] =~= out@);
                }
            } else {
                if prev_command.is_empty() {
                    return Err(EdError::DefaultShellCommandUnset);
                }
                push_str(&mut out, prev_command);
                proof {
                    lemma_prefixed_twice(before, prev_command@, rest);
                }
            }
        } else {
            if escaped {
                out.push('\\');
                out.push(ch);
                escaped = false;
                proof {
                    lemma_prefixed_twice(before, seq!['\\', ch], rest);
                    assert(before + seq!['\\', ch] =~= out@);
                }
            } else {
                out.push(ch);
                proof {
                    lemma_prefixed_twice(before, seq![ch], rest);
                    assert(before + seq![ch] =~= out@);
                }
            }
        }
        i = i + 1;
    }
    assert(out@ + Seq::<char>::empty() =~= out@);
    Ok(string_from_chars(out.as_slice()))
}

} // verus!
